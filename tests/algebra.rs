use mokuba::algebra::laws::{Associativity, Identity};
use mokuba::algebra::monoid::Monoid;
use mokuba::algebra::semigroup::Semigroup;

#[test]
fn algebra_test_semigroup() {
    assert_eq!(i32::combine(2, 2), 4);
    assert_eq!(i32::combine(2, 3), 5);
    assert_eq!(
        String::combine("2".to_string(), "3".to_string()),
        "23".to_string()
    );
    let a = Result::<i32, String>::Ok(2);
    let b = Result::<i32, String>::Ok(3);
    assert_eq!(Result::combine(a, b).unwrap(), 5);
}

#[test]
fn algebra_test_monoid() {
    assert_eq!(i32::empty(), 0);
    assert_eq!(u32::empty(), 0);
    assert_eq!(String::empty(), "".to_string());
}

#[test]
fn mod_test_semigroup() {
    assert_eq!(i32::combine(2, 2), 4);
    assert_eq!(i32::combine(2, 3), 5);
    assert_eq!(
        String::combine("2".to_string(), "3".to_string()),
        "23".to_string()
    );
    let a = Result::<i32, String>::Ok(2);
    let b = Result::<i32, String>::Ok(3);
    assert_eq!(Result::combine(a, b).unwrap(), 5);
}

#[test]
fn mod_test_monoid() {
    assert_eq!(i32::empty(), 0);
    assert_eq!(u32::empty(), 0);
    assert_eq!(String::empty(), "".to_string());
}

#[test]
fn combine_is_associative_on_integers() {
    let (a, b, c) = (7i32, -12i32, 30i32);
    assert_eq!(i32::combine(i32::combine(a, b), c), i32::combine(a, i32::combine(b, c)));
    assert_eq!(i32::combine(i32::combine(a, b), c), 25);
}

#[test]
fn combine_is_associative_on_strings() {
    let left = String::combine(
        String::combine("ab".to_string(), "cd".to_string()),
        "ef".to_string(),
    );
    let right = String::combine(
        "ab".to_string(),
        String::combine("cd".to_string(), "ef".to_string()),
    );
    assert_eq!(left, "abcdef");
    assert_eq!(left, right);
}

#[test]
fn empty_is_neutral_for_integers_and_strings() {
    assert_eq!(i32::combine(i32::empty(), 42), 42);
    assert_eq!(i32::combine(-5, i32::empty()), -5);
    assert_eq!(String::combine(String::empty(), "hey".to_string()), "hey");
    assert_eq!(String::combine("hey".to_string(), String::empty()), "hey");
}

#[test]
fn integers_wrap_at_their_bounds() {
    assert_eq!(u32::combine(u32::MAX, 1), 0);
    assert_eq!(i32::combine(i32::MAX, 1), i32::MIN);
    assert_eq!(i32::combine(i32::MIN, -1), i32::MAX);
}

#[test]
fn booleans_combine_by_conjunction() {
    assert!(bool::combine(true, true));
    assert!(!bool::combine(true, false));
    assert!(!bool::combine(false, true));
    assert!(bool::empty());
    assert!(<bool as Identity<bool>>::identity());
}

#[test]
fn sequences_concatenate_in_order() {
    assert_eq!(Vec::combine(vec![1, 2], vec![3]), vec![1, 2, 3]);
    assert_eq!(Vec::<u8>::empty(), Vec::<u8>::new());
    assert_eq!(<Vec<u8> as Associativity<Vec<u8>>>::associativity(vec![], vec![9]), vec![9]);
}

#[test]
fn results_keep_the_first_failure() {
    let ok = Result::<i32, String>::Ok(2);
    let bad1 = Result::<i32, String>::Err("first".to_string());
    let bad2 = Result::<i32, String>::Err("second".to_string());
    assert_eq!(Result::combine(bad1.clone(), bad2), Err("first".to_string()));
    assert_eq!(Result::combine(ok.clone(), bad1.clone()), Err("first".to_string()));
    assert_eq!(Result::combine(bad1, ok), Err("first".to_string()));
    assert_eq!(Result::<i32, String>::empty(), Ok(0));
}
