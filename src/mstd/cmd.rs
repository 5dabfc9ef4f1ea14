//! Commands: the parsed form of a command line, and the traits a command
//! implements.

use vstd::prelude::*;
use crate::mstd::text::same_text;

verus! {

/// The name this program goes by.
pub const BIN_NAME: &'static str = "mokuba";

/// The version of this program.
pub const VERSION: &'static str = "0.1.0";

/// How to call this program.
pub const HELP: &'static str = "Usage: {} [OPTION]...\nmokuba [command] [options]\n";

/// The first value bound to `k` in a list of flags and values.
pub open spec fn lookup(ps: Seq<(Seq<char>, Seq<char>)>, k: Seq<char>) -> Option<Seq<char>>
    decreases ps.len(),
{
    if ps.len() == 0 {
        None
    } else if ps[0].0 == k {
        Some(ps[0].1)
    } else {
        lookup(ps.skip(1), k)
    }
}

/// No flag occurs twice.
pub open spec fn keys_unique(ps: Seq<(Seq<char>, Seq<char>)>) -> bool {
    forall|i: int, j: int| 0 <= i < j < ps.len() ==> ps[i].0 != ps[j].0
}

/// A command line split into its command and the values of its flags.
#[derive(Debug)]
pub struct Input {
    pub arg: String,
    pub params: Vec<(String, String)>,
}

impl Input {
    pub fn new(arg: String, params: Vec<(String, String)>) -> (r: Input)
        ensures
            r.arg == arg,
            r.params == params,
    {
        Input { arg, params }
    }

    /// The flags and their values, as text.
    pub open spec fn pairs(&self) -> Seq<(Seq<char>, Seq<char>)> {
        self.params.deep_view()
    }

    /// The value of the flag `key`.
    pub fn get(&self, key: &str) -> (r: Option<&String>)
        ensures
            match r {
                Some(v) => lookup(self.pairs(), key@) == Some(v@),
                None => lookup(self.pairs(), key@) is None,
            },
    {
        let ghost ps = self.pairs();
        let mut i: usize = 0;
        assert(ps.skip(0) =~= ps);
        while i < self.params.len()
            invariant
                ps == self.pairs(),
                i <= ps.len(),
                lookup(ps, key@) == lookup(ps.skip(i as int), key@),
            decreases ps.len() - i,
        {
            assert(ps.skip(i as int)[0] == ps[i as int]);
            assert(ps.skip(i as int).skip(1) =~= ps.skip(i + 1));
            if same_text(self.params[i].0.as_str(), key) {
                return Some(&self.params[i].1);
            }
            i += 1;
        }
        None
    }
}

/// A command that runs with optional parameters of type `P`.
pub trait Execute<P> {
    /// Holds of the parameters and what running returns.
    spec fn executed(&self, params: Option<P>, r: Result<String, String>) -> bool;

    fn execute(&self, params: Option<P>) -> (r: Result<String, String>)
        ensures
            self.executed(params, r),
    ;
}

/// A command as it is named on the command line.
pub trait Argument {
    spec fn short_name(&self) -> char;

    spec fn name(&self) -> Seq<char>;

    spec fn about(&self) -> Seq<char>;

    spec fn accepts_flag(key: Seq<char>) -> bool;

    /// The one-letter name.
    fn short(&self) -> (r: char)
        ensures
            r == self.short_name(),
    ;

    /// The full name.
    fn argument(&self) -> (r: String)
        ensures
            r@ == self.name(),
    ;

    /// What the command does and how to call it.
    fn description(&self) -> (r: String)
        ensures
            r@ == self.about(),
    ;

    /// Tells whether the command takes the flag `key`.
    fn is_valid_flag(key: &str) -> (r: bool)
        ensures
            r == Self::accepts_flag(key@),
    ;
}

/// A command that reads its parameters of type `O` from an input.
pub trait Parse<O> {
    /// Holds of an input and what parsing it returns.
    spec fn parsed(&self, s: &Input, r: Result<O, String>) -> bool;

    fn parse(&self, s: &Input) -> (r: Result<O, String>)
        ensures
            self.parsed(s, r),
    ;
}

} // verus!

verus! {

/// With unique flags, a flag's value is the one stored beside it.
pub proof fn lemma_lookup_at(ps: Seq<(Seq<char>, Seq<char>)>, j: int)
    requires
        keys_unique(ps),
        0 <= j < ps.len(),
    ensures
        lookup(ps, ps[j].0) == Some(ps[j].1),
    decreases ps.len(),
{
    if j > 0 {
        let rest = ps.skip(1);
        assert(rest[j - 1] == ps[j]);
        assert(keys_unique(rest)) by {
            assert forall|a: int, b: int| 0 <= a < b < rest.len() implies rest[a].0 != rest[b].0 by {
                assert(rest[a] == ps[a + 1] && rest[b] == ps[b + 1]);
            }
        }
        lemma_lookup_at(rest, j - 1);
    }
}

/// A flag that is stored nowhere has no value.
pub proof fn lemma_lookup_absent(ps: Seq<(Seq<char>, Seq<char>)>, k: Seq<char>)
    requires
        forall|j: int| 0 <= j < ps.len() ==> (#[trigger] ps[j]).0 != k,
    ensures
        lookup(ps, k) is None,
    decreases ps.len(),
{
    if ps.len() > 0 {
        let rest = ps.skip(1);
        assert forall|j: int| 0 <= j < rest.len() implies (#[trigger] rest[j]).0 != k by {
            assert(rest[j] == ps[j + 1]);
        }
        lemma_lookup_absent(rest, k);
    }
}

/// Binds `key` to `value`, replacing any value it had; other flags keep theirs.
pub fn insert_param(params: &mut Vec<(String, String)>, key: String, value: String)
    requires
        keys_unique(old(params).deep_view()),
    ensures
        keys_unique(final(params).deep_view()),
        forall|k: Seq<char>|
            #[trigger] lookup(final(params).deep_view(), k) == if k == key@ {
                Some(value@)
            } else {
                lookup(old(params).deep_view(), k)
            },
{
    let ghost before = params.deep_view();
    let mut j: usize = 0;
    while j < params.len()
        invariant
            before == params.deep_view(),
            before == old(params).deep_view(),
            keys_unique(before),
            j <= before.len(),
            forall|a: int| 0 <= a < j ==> (#[trigger] before[a]).0 != key@,
        decreases before.len() - j,
    {
        if same_text(params[j].0.as_str(), key.as_str()) {
            let ghost found = j as int;
            params.set(j, (key, value));
            let ghost after = params.deep_view();
            assert(after =~= before.update(found, (key@, value@)));
            assert forall|a: int, b: int| 0 <= a < b < after.len() implies after[a].0
                != after[b].0 by {
                assert(before[a].0 != before[b].0);
            }
            assert forall|k: Seq<char>|
                #[trigger] lookup(after, k) == if k == key@ {
                    Some(value@)
                } else {
                    lookup(before, k)
                } by {
                if k == key@ {
                    lemma_lookup_at(after, found);
                } else if exists|a: int| 0 <= a < before.len() && before[a].0 == k {
                    let a = choose|a: int| 0 <= a < before.len() && before[a].0 == k;
                    lemma_lookup_at(before, a);
                    lemma_lookup_at(after, a);
                } else {
                    lemma_lookup_absent(before, k);
                    lemma_lookup_absent(after, k);
                }
            }
            return;
        }
        j += 1;
    }
    params.push((key, value));
    let ghost after = params.deep_view();
    assert(after =~= before.push((key@, value@)));
    assert forall|a: int, b: int| 0 <= a < b < after.len() implies after[a].0 != after[b].0 by {
        if b < before.len() {
            assert(before[a].0 != before[b].0);
        }
    }
    assert forall|k: Seq<char>|
        #[trigger] lookup(after, k) == if k == key@ {
            Some(value@)
        } else {
            lookup(before, k)
        } by {
        if k == key@ {
            lemma_lookup_at(after, before.len() as int);
        } else if exists|a: int| 0 <= a < before.len() && before[a].0 == k {
            let a = choose|a: int| 0 <= a < before.len() && before[a].0 == k;
            lemma_lookup_at(before, a);
            lemma_lookup_at(after, a);
        } else {
            lemma_lookup_absent(before, k);
            lemma_lookup_absent(after, k);
        }
    }
}

} // verus!
