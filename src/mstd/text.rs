//! Character-level text handling: whitespace, words, and decimal numerals.

use vstd::prelude::*;
use vstd::string::*;

verus! {

/// The characters that carry Unicode's `White_Space` property.
pub open spec fn is_white_space(c: char) -> bool {
    let n = c as u32;
    (9 <= n && n <= 13) || n == 32 || n == 0x85 || n == 0xA0 || n == 0x1680 || (0x2000 <= n
        && n <= 0x200A) || n == 0x2028 || n == 0x2029 || n == 0x202F || n == 0x205F || n == 0x3000
}

/// Splits `s` at whitespace, where `cur` is the part of a word read so far.
/// Runs of whitespace separate words; no word is empty.
pub open spec fn split_from(s: Seq<char>, cur: Seq<char>) -> Seq<Seq<char>>
    decreases s.len(),
{
    if s.len() == 0 {
        if cur.len() == 0 {
            Seq::empty()
        } else {
            seq![cur]
        }
    } else if is_white_space(s[0]) {
        if cur.len() == 0 {
            split_from(s.skip(1), Seq::empty())
        } else {
            seq![cur] + split_from(s.skip(1), Seq::empty())
        }
    } else {
        split_from(s.skip(1), cur.push(s[0]))
    }
}

/// The words of `s`: its maximal runs of characters that are not whitespace, in order.
pub open spec fn words(s: Seq<char>) -> Seq<Seq<char>> {
    split_from(s, Seq::empty())
}

/// The words of `ws` joined by single spaces.
pub open spec fn join_words(ws: Seq<Seq<char>>) -> Seq<char>
    decreases ws.len(),
{
    if ws.len() == 0 {
        Seq::empty()
    } else if ws.len() == 1 {
        ws[0]
    } else {
        join_words(ws.drop_last()) + seq![' '] + ws.last()
    }
}

/// A word that survives a split unchanged: not empty, and free of whitespace.
pub open spec fn is_word(w: Seq<char>) -> bool {
    w.len() > 0 && forall|i: int| 0 <= i < w.len() ==> !is_white_space(#[trigger] w[i])
}

/// Tells whether `c` is a whitespace character.
pub fn is_white_space_char(c: char) -> (r: bool)
    ensures
        r == is_white_space(c),
{
    let n = c as u32;
    (9 <= n && n <= 13) || n == 32 || n == 0x85 || n == 0xA0 || n == 0x1680 || (0x2000 <= n && n
        <= 0x200A) || n == 0x2028 || n == 0x2029 || n == 0x202F || n == 0x205F || n == 0x3000
}

/// Splits `s` into its words.
pub fn split_words(s: &str) -> (r: Vec<String>)
    ensures
        r.deep_view() == words(s@),
{
    let n = s.unicode_len();
    let mut out: Vec<String> = Vec::new();
    let mut start: usize = 0;
    let mut i: usize = 0;
    assert(s@.skip(0) =~= s@);
    assert(s@.subrange(0, 0) =~= Seq::<char>::empty());
    assert(out.deep_view() + words(s@) =~= words(s@));
    while i < n
        invariant
            n == s@.len(),
            start <= i <= n,
            out.deep_view() + split_from(s@.skip(i as int), s@.subrange(start as int, i as int))
                == words(s@),
        decreases n - i,
    {
        let c = s.get_char(i);
        let ghost rest = s@.skip(i as int);
        let ghost cur = s@.subrange(start as int, i as int);
        assert(rest[0] == c);
        assert(rest.skip(1) =~= s@.skip(i + 1));
        if is_white_space_char(c) {
            if start < i {
                let w = s.substring_char(start, i).to_owned();
                let ghost before = out.deep_view();
                out.push(w);
                assert(out.deep_view() =~= before + seq![cur]);
                assert(s@.subrange((i + 1) as int, (i + 1) as int) =~= Seq::<char>::empty());
            } else {
                assert(cur =~= Seq::<char>::empty());
                assert(s@.subrange((i + 1) as int, (i + 1) as int) =~= Seq::<char>::empty());
            }
            start = i + 1;
        } else {
            assert(cur.push(c) =~= s@.subrange(start as int, i + 1));
        }
        i += 1;
    }
    let ghost cur = s@.subrange(start as int, n as int);
    assert(s@.skip(n as int) =~= Seq::<char>::empty());
    if start < n {
        let w = s.substring_char(start, n).to_owned();
        let ghost before = out.deep_view();
        out.push(w);
        assert(out.deep_view() =~= before + seq![cur]);
    } else {
        assert(out.deep_view() + Seq::<Seq<char>>::empty() =~= out.deep_view());
    }
    out
}

} // verus!

verus! {

/// Relies on `String::push`: appends one character at the end.
#[verifier::external_body]
pub(crate) fn push_char(s: &mut String, c: char)
    ensures
        final(s)@ == old(s)@.push(c),
{
    s.push(c)
}

/// Tells whether two texts hold the same characters.
pub fn same_text(a: &str, b: &str) -> (r: bool)
    ensures
        r == (a@ == b@),
{
    let n = a.unicode_len();
    if n != b.unicode_len() {
        return false;
    }
    let mut i: usize = 0;
    while i < n
        invariant
            n == a@.len() == b@.len(),
            i <= n,
            a@.take(i as int) == b@.take(i as int),
        decreases n - i,
    {
        if a.get_char(i) != b.get_char(i) {
            return false;
        }
        assert(a@.take(i + 1) =~= a@.take(i as int).push(a@[i as int]));
        assert(b@.take(i + 1) =~= b@.take(i as int).push(b@[i as int]));
        i += 1;
    }
    assert(a@ =~= a@.take(n as int));
    assert(b@ =~= b@.take(n as int));
    true
}

/// An owned copy of `a` followed by `b`.
pub fn concat2(a: &str, b: &str) -> (r: String)
    ensures
        r@ == a@ + b@,
{
    let mut s = a.to_owned();
    s.append(b);
    s
}

/// An owned copy of `a` followed by `b` and `c`.
pub fn concat3(a: &str, b: &str, c: &str) -> (r: String)
    ensures
        r@ == a@ + b@ + c@,
{
    let mut s = a.to_owned();
    s.append(b);
    s.append(c);
    s
}

} // verus!

verus! {

/// Characters that are not whitespace extend the word being read.
pub proof fn lemma_split_inside_word(t: Seq<char>, rest: Seq<char>, cur: Seq<char>)
    requires
        forall|i: int| 0 <= i < t.len() ==> !is_white_space(#[trigger] t[i]),
    ensures
        split_from(t + rest, cur) == split_from(rest, cur + t),
    decreases t.len(),
{
    if t.len() == 0 {
        assert(t + rest =~= rest);
        assert(cur + t =~= cur);
    } else {
        assert((t + rest)[0] == t[0]);
        assert((t + rest).skip(1) =~= t.skip(1) + rest);
        assert(cur.push(t[0]) + t.skip(1) =~= cur + t);
        lemma_split_inside_word(t.skip(1), rest, cur.push(t[0]));
    }
}

/// Joining by `ws.len() - 1` spaces, read from the front.
pub proof fn lemma_join_front(ws: Seq<Seq<char>>)
    requires
        ws.len() >= 2,
    ensures
        join_words(ws) == ws[0] + seq![' '] + join_words(ws.skip(1)),
    decreases ws.len(),
{
    if ws.len() == 2 {
        assert(join_words(ws.drop_last()) == ws[0]);
        assert(join_words(ws.skip(1)) == ws[1]);
    } else {
        lemma_join_front(ws.drop_last());
        let a = ws[0];
        let m = join_words(ws.drop_last().skip(1));
        assert(ws.skip(1).drop_last() =~= ws.drop_last().skip(1));
        assert(ws.skip(1).last() == ws.last());
        assert(ws.drop_last()[0] == ws[0]);
        assert(join_words(ws.skip(1)) == m + seq![' '] + ws.last());
        assert(join_words(ws) == a + seq![' '] + m + seq![' '] + ws.last());
        assert(a + seq![' '] + m + seq![' '] + ws.last() =~= a + seq![' '] + (m + seq![' ']
            + ws.last()));
    }
}

/// Splitting words that were joined by single spaces gives the words back.
pub proof fn lemma_words_of_join(ws: Seq<Seq<char>>)
    requires
        forall|i: int| 0 <= i < ws.len() ==> is_word(#[trigger] ws[i]),
    ensures
        words(join_words(ws)) == ws,
    decreases ws.len(),
{
    let e = Seq::<char>::empty();
    if ws.len() == 0 {
    } else if ws.len() == 1 {
        assert(is_word(ws[0]));
        lemma_split_inside_word(ws[0], e, e);
        assert(ws[0] + e =~= ws[0]);
        assert(e + ws[0] =~= ws[0]);
        assert(seq![ws[0]] =~= ws);
    } else {
        let rest = ws.skip(1);
        assert(is_word(ws[0]));
        assert forall|i: int| 0 <= i < rest.len() implies is_word(#[trigger] rest[i]) by {
            assert(rest[i] == ws[i + 1]);
        }
        lemma_join_front(ws);
        lemma_words_of_join(rest);
        let tail = seq![' '] + join_words(rest);
        assert(ws[0] + seq![' '] + join_words(rest) =~= ws[0] + tail);
        lemma_split_inside_word(ws[0], tail, e);
        assert(e + ws[0] =~= ws[0]);
        assert(tail[0] == ' ');
        assert(tail.skip(1) =~= join_words(rest));
        assert(seq![ws[0]] + rest =~= ws);
    }
}

} // verus!

verus! {

/// No word is empty.
pub proof fn lemma_words_not_empty(s: Seq<char>, cur: Seq<char>)
    ensures
        forall|i: int|
            0 <= i < split_from(s, cur).len() ==> (#[trigger] split_from(s, cur)[i]).len() > 0,
    decreases s.len(),
{
    let r = split_from(s, cur);
    if s.len() == 0 {
        if cur.len() > 0 {
            assert(r =~= seq![cur]);
        } else {
            assert(r.len() == 0);
        }
    } else if is_white_space(s[0]) {
        let rest = split_from(s.skip(1), Seq::empty());
        lemma_words_not_empty(s.skip(1), Seq::empty());
        if cur.len() > 0 {
            assert(r == seq![cur] + rest);
            assert forall|i: int| 0 <= i < r.len() implies (#[trigger] r[i]).len() > 0 by {
                if i > 0 {
                    assert(r[i] == rest[i - 1]);
                }
            }
        } else {
            assert(r == rest);
        }
    } else {
        lemma_words_not_empty(s.skip(1), cur.push(s[0]));
        assert(r == split_from(s.skip(1), cur.push(s[0])));
    }
}

} // verus!
