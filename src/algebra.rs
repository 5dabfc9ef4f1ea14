//! A small algebra of combinable values, and the types registered with it.

pub mod laws;
pub mod monoid;
pub mod semigroup;

use vstd::prelude::*;
use vstd::string::*;
use laws::{Associativity, Identity};

verus! {

/// Signed integers add, wrapping at the type's bounds.
impl Associativity<i32> for i32 {
    type Model = i32;

    open spec fn model(a: i32) -> i32 {
        a
    }

    open spec fn op(x: i32, y: i32) -> i32 {
        x.wrapping_add(y)
    }

    proof fn lemma_associative(x: i32, y: i32, z: i32) {
    }

    fn associativity(lhs: i32, rhs: i32) -> (r: i32) {
        lhs.wrapping_add(rhs)
    }
}

impl Identity<i32> for i32 {
    open spec fn unit() -> i32 {
        0
    }

    proof fn lemma_identity(x: i32) {
    }

    fn identity() -> (r: i32) {
        0
    }
}

/// Unsigned integers add, wrapping at the type's bounds.
impl Associativity<u32> for u32 {
    type Model = u32;

    open spec fn model(a: u32) -> u32 {
        a
    }

    open spec fn op(x: u32, y: u32) -> u32 {
        x.wrapping_add(y)
    }

    proof fn lemma_associative(x: u32, y: u32, z: u32) {
    }

    fn associativity(lhs: u32, rhs: u32) -> (r: u32) {
        lhs.wrapping_add(rhs)
    }
}

impl Identity<u32> for u32 {
    open spec fn unit() -> u32 {
        0
    }

    proof fn lemma_identity(x: u32) {
    }

    fn identity() -> (r: u32) {
        0
    }
}

/// Strings concatenate.
impl Associativity<String> for String {
    type Model = Seq<char>;

    open spec fn model(a: String) -> Seq<char> {
        a@
    }

    open spec fn op(x: Seq<char>, y: Seq<char>) -> Seq<char> {
        x + y
    }

    proof fn lemma_associative(x: Seq<char>, y: Seq<char>, z: Seq<char>) {
        assert(x + y + z =~= x + (y + z));
    }

    fn associativity(lhs: String, rhs: String) -> (r: String) {
        let mut s = lhs;
        s.append(rhs.as_str());
        s
    }
}

impl Identity<String> for String {
    open spec fn unit() -> Seq<char> {
        Seq::empty()
    }

    proof fn lemma_identity(x: Seq<char>) {
        assert(Seq::<char>::empty() + x =~= x);
        assert(x + Seq::<char>::empty() =~= x);
    }

    fn identity() -> (r: String) {
        String::new()
    }
}

/// Booleans combine by conjunction.
impl Associativity<bool> for bool {
    type Model = bool;

    open spec fn model(a: bool) -> bool {
        a
    }

    open spec fn op(x: bool, y: bool) -> bool {
        x && y
    }

    proof fn lemma_associative(x: bool, y: bool, z: bool) {
    }

    fn associativity(lhs: bool, rhs: bool) -> (r: bool) {
        lhs && rhs
    }
}

impl Identity<bool> for bool {
    open spec fn unit() -> bool {
        true
    }

    proof fn lemma_identity(x: bool) {
    }

    fn identity() -> (r: bool) {
        true
    }
}

/// Sequences concatenate, keeping the order of their elements.
impl<T> Associativity<Vec<T>> for Vec<T> {
    type Model = Seq<T>;

    open spec fn model(a: Vec<T>) -> Seq<T> {
        a@
    }

    open spec fn op(x: Seq<T>, y: Seq<T>) -> Seq<T> {
        x + y
    }

    proof fn lemma_associative(x: Seq<T>, y: Seq<T>, z: Seq<T>) {
        assert(x + y + z =~= x + (y + z));
    }

    fn associativity(lhs: Vec<T>, rhs: Vec<T>) -> (r: Vec<T>) {
        let mut v = lhs;
        let mut w = rhs;
        v.append(&mut w);
        v
    }
}

impl<T> Identity<Vec<T>> for Vec<T> {
    open spec fn unit() -> Seq<T> {
        Seq::empty()
    }

    proof fn lemma_identity(x: Seq<T>) {
        assert(Seq::<T>::empty() + x =~= x);
        assert(x + Seq::<T>::empty() =~= x);
    }

    fn identity() -> (r: Vec<T>) {
        Vec::new()
    }
}

/// The meaning of a result: the meaning of its success, or its error.
pub open spec fn result_model<T: Associativity<T>, E>(r: Result<T, E>) -> Result<
    <T as Associativity<T>>::Model,
    E,
> {
    match r {
        Ok(t) => Ok(<T as Associativity<T>>::model(t)),
        Err(e) => Err(e),
    }
}

/// Results combine their successes; the first failure wins.
impl<T: Associativity<T>, E> Associativity<Result<T, E>> for Result<T, E> {
    type Model = Result<<T as Associativity<T>>::Model, E>;

    open spec fn model(a: Result<T, E>) -> Self::Model {
        result_model(a)
    }

    open spec fn op(x: Self::Model, y: Self::Model) -> Self::Model {
        match x {
            Ok(a) => match y {
                Ok(b) => Ok(<T as Associativity<T>>::op(a, b)),
                Err(e) => Err(e),
            },
            Err(e) => Err(e),
        }
    }

    proof fn lemma_associative(x: Self::Model, y: Self::Model, z: Self::Model) {
        if let (Ok(a), Ok(b), Ok(c)) = (x, y, z) {
            <T as Associativity<T>>::lemma_associative(a, b, c);
        }
    }

    fn associativity(lhs: Result<T, E>, rhs: Result<T, E>) -> (r: Result<T, E>) {
        match lhs {
            Ok(lhs) => match rhs {
                Ok(rhs) => Ok(T::associativity(lhs, rhs)),
                Err(err) => Err(err),
            },
            Err(err) => Err(err),
        }
    }
}

impl<T: Identity<T>, E> Identity<Result<T, E>> for Result<T, E> {
    open spec fn unit() -> Self::Model {
        Ok(<T as Identity<T>>::unit())
    }

    proof fn lemma_identity(x: Self::Model) {
        if let Ok(a) = x {
            <T as Identity<T>>::lemma_identity(a);
        }
    }

    fn identity() -> (r: Result<T, E>) {
        Ok(T::identity())
    }
}

} // verus!

verus! {

/// Combining is associative: for any three values, combining the first two
/// and then the third means the same as combining the first with the
/// combination of the last two.
pub proof fn lemma_combine_associative<A: Associativity<A>>(a: A, b: A, c: A)
    ensures
        <A as Associativity<A>>::op(
            <A as Associativity<A>>::op(
                <A as Associativity<A>>::model(a),
                <A as Associativity<A>>::model(b),
            ),
            <A as Associativity<A>>::model(c),
        ) == <A as Associativity<A>>::op(
            <A as Associativity<A>>::model(a),
            <A as Associativity<A>>::op(
                <A as Associativity<A>>::model(b),
                <A as Associativity<A>>::model(c),
            ),
        ),
{
    <A as Associativity<A>>::lemma_associative(
        <A as Associativity<A>>::model(a),
        <A as Associativity<A>>::model(b),
        <A as Associativity<A>>::model(c),
    );
}

/// The empty value is neutral: combining it with any value, on either side,
/// gives that value.
pub proof fn lemma_empty_is_neutral<A: Identity<A>>(x: A)
    ensures
        <A as Associativity<A>>::op(<A as Identity<A>>::unit(), <A as Associativity<A>>::model(x))
            == <A as Associativity<A>>::model(x),
        <A as Associativity<A>>::op(<A as Associativity<A>>::model(x), <A as Identity<A>>::unit())
            == <A as Associativity<A>>::model(x),
{
    <A as Identity<A>>::lemma_identity(<A as Associativity<A>>::model(x));
}

/// For integers, combining is addition, and it is associative.
pub proof fn lemma_i32_combine_associative(a: i32, b: i32, c: i32)
    ensures
        <i32 as Associativity<i32>>::op(a, b) == a.wrapping_add(b),
        <i32 as Associativity<i32>>::op(<i32 as Associativity<i32>>::op(a, b), c)
            == <i32 as Associativity<i32>>::op(a, <i32 as Associativity<i32>>::op(b, c)),
{
}

/// For strings, combining is concatenation, and it is associative.
pub proof fn lemma_string_combine_associative(a: String, b: String, c: String)
    ensures
        <String as Associativity<String>>::op(a@, b@) == a@ + b@,
        <String as Associativity<String>>::op(<String as Associativity<String>>::op(a@, b@), c@)
            == <String as Associativity<String>>::op(
            a@,
            <String as Associativity<String>>::op(b@, c@),
        ),
{
    lemma_combine_associative(a, b, c);
}

/// For integers, the empty value is zero, and combining it with any integer
/// gives that integer.
pub proof fn lemma_i32_empty_is_neutral(x: i32)
    ensures
        <i32 as Identity<i32>>::unit() == 0,
        <i32 as Associativity<i32>>::op(<i32 as Identity<i32>>::unit(), x) == x,
{
}

/// For strings, the empty value is the empty string, and combining it with
/// any string gives that string.
pub proof fn lemma_string_empty_is_neutral(s: String)
    ensures
        <String as Identity<String>>::unit() == Seq::<char>::empty(),
        <String as Associativity<String>>::op(<String as Identity<String>>::unit(), s@) == s@,
{
    lemma_empty_is_neutral(s);
}

} // verus!
