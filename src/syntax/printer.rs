//! Printing values for people to read.

use vstd::prelude::*;
use vstd::string::*;
use crate::mstd::numeral::{decimal, decimal_string, signed_decimal, signed_decimal_string};
use crate::mstd::text::push_char;

verus! {

/// Values with a readable text form.
pub trait PrettyPrint<A> {
    /// The text `pretty_print` gives.
    spec fn pretty(&self) -> Seq<char>;

    fn pretty_print(&self) -> (r: String)
        ensures
            r@ == self.pretty(),
    ;
}

/// Texts joined by a comma and a space.
pub open spec fn join_commas(ps: Seq<Seq<char>>) -> Seq<char>
    decreases ps.len(),
{
    if ps.len() == 0 {
        Seq::empty()
    } else if ps.len() == 1 {
        ps[0]
    } else {
        join_commas(ps.drop_last()) + seq![',', ' '] + ps.last()
    }
}

impl PrettyPrint<String> for String {
    open spec fn pretty(&self) -> Seq<char> {
        self@
    }

    fn pretty_print(&self) -> (r: String) {
        self.clone()
    }
}

/// A present value prints as itself, an absent one as `None`.
impl<A: PrettyPrint<A>> PrettyPrint<Option<A>> for Option<A> {
    open spec fn pretty(&self) -> Seq<char> {
        match self {
            Some(a) => a.pretty(),
            None => "None"@,
        }
    }

    fn pretty_print(&self) -> (r: String) {
        match self {
            Some(a) => a.pretty_print(),
            None => String::from_str("None"),
        }
    }
}

/// A result prints as its success or as its error.
impl<A: PrettyPrint<A>, E: PrettyPrint<E>> PrettyPrint<Result<A, E>> for Result<A, E> {
    open spec fn pretty(&self) -> Seq<char> {
        match self {
            Ok(a) => a.pretty(),
            Err(e) => e.pretty(),
        }
    }

    fn pretty_print(&self) -> (r: String) {
        match self {
            Ok(a) => a.pretty_print(),
            Err(e) => e.pretty_print(),
        }
    }
}

/// A sequence prints as its elements between brackets, separated by commas.
impl<A: PrettyPrint<A>> PrettyPrint<Vec<A>> for Vec<A> {
    open spec fn pretty(&self) -> Seq<char> {
        seq!['['] + join_commas(self@.map(|_i: int, a: A| a.pretty())) + seq![']']
    }

    fn pretty_print(&self) -> (r: String) {
        let ghost ps = self@.map(|_i: int, a: A| a.pretty());
        let mut s = String::new();
        push_char(&mut s, '[');
        let mut i: usize = 0;
        assert(ps.take(0) =~= Seq::<Seq<char>>::empty());
        while i < self.len()
            invariant
                i <= self@.len(),
                ps == self@.map(|_i: int, a: A| a.pretty()),
                s@ == seq!['['] + join_commas(ps.take(i as int)),
            decreases self@.len() - i,
        {
            let ghost before = s@;
            let item = self[i].pretty_print();
            if i > 0 {
                push_char(&mut s, ',');
                push_char(&mut s, ' ');
            }
            s.append(item.as_str());
            assert(ps.take(i + 1).drop_last() =~= ps.take(i as int));
            assert(ps.take(i + 1).last() == item@);
            if i == 0 {
                assert(s@ =~= seq!['['] + join_commas(ps.take(1)));
            } else {
                assert(s@ =~= seq!['['] + (join_commas(ps.take(i as int)) + seq![',', ' '] + item@));
            }
            i += 1;
        }
        assert(ps.take(self@.len() as int) =~= ps);
        push_char(&mut s, ']');
        s
    }
}

impl PrettyPrint<bool> for bool {
    open spec fn pretty(&self) -> Seq<char> {
        if *self {
            "true"@
        } else {
            "false"@
        }
    }

    fn pretty_print(&self) -> (r: String) {
        if *self {
            String::from_str("true")
        } else {
            String::from_str("false")
        }
    }
}

impl PrettyPrint<char> for char {
    open spec fn pretty(&self) -> Seq<char> {
        seq![*self]
    }

    fn pretty_print(&self) -> (r: String) {
        let mut s = String::new();
        push_char(&mut s, *self);
        s
    }
}

impl PrettyPrint<i8> for i8 {
    open spec fn pretty(&self) -> Seq<char> {
        signed_decimal(*self as int)
    }

    fn pretty_print(&self) -> (r: String) {
        signed_decimal_string(*self as i64)
    }
}

impl PrettyPrint<i16> for i16 {
    open spec fn pretty(&self) -> Seq<char> {
        signed_decimal(*self as int)
    }

    fn pretty_print(&self) -> (r: String) {
        signed_decimal_string(*self as i64)
    }
}

impl PrettyPrint<i32> for i32 {
    open spec fn pretty(&self) -> Seq<char> {
        signed_decimal(*self as int)
    }

    fn pretty_print(&self) -> (r: String) {
        signed_decimal_string(*self as i64)
    }
}

impl PrettyPrint<i64> for i64 {
    open spec fn pretty(&self) -> Seq<char> {
        signed_decimal(*self as int)
    }

    fn pretty_print(&self) -> (r: String) {
        signed_decimal_string(*self)
    }
}

impl PrettyPrint<u32> for u32 {
    open spec fn pretty(&self) -> Seq<char> {
        decimal(*self as nat)
    }

    fn pretty_print(&self) -> (r: String) {
        decimal_string(*self as u64)
    }
}

} // verus!
