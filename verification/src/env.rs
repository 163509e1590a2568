//! The environment of a process: variable names and their values.

use crate::text::same_text;
use vstd::prelude::*;

verus! {

/// The mapping that a list of pairs stands for when a later pair replaces an
/// earlier one of the same name; of the first `n` pairs.
pub open spec fn pairs_map(pairs: Seq<(String, String)>, n: nat) -> Map<Seq<char>, Seq<char>>
    decreases n,
{
    if n == 0 || n > pairs.len() {
        Map::empty()
    } else {
        pairs_map(pairs, (n - 1) as nat).insert(pairs[n - 1].0@, pairs[n - 1].1@)
    }
}

/// Whether no name occurs twice in the list.
pub open spec fn distinct_names(pairs: Seq<(String, String)>) -> bool {
    forall|i: int, j: int|
        0 <= i < j < pairs.len() ==> (#[trigger] pairs[i]).0@ != (#[trigger] pairs[j]).0@
}

/// A set of environment variables. Each name occurs once; the order in which
/// the variables were first set is kept, so that the same steps always give
/// the same list.
#[derive(Debug)]
pub struct Environment {
    pairs: Vec<(String, String)>,
}

impl View for Environment {
    type V = Map<Seq<char>, Seq<char>>;

    closed spec fn view(&self) -> Map<Seq<char>, Seq<char>> {
        pairs_map(self.pairs@, self.pairs@.len())
    }
}

/// The names among the first `n` pairs are exactly the names of their mapping.
proof fn lemma_names(pairs: Seq<(String, String)>, n: nat, name: Seq<char>)
    requires
        n <= pairs.len(),
    ensures
        pairs_map(pairs, n).dom().contains(name) <==> exists|i: int|
            0 <= i < n && (#[trigger] pairs[i]).0@ == name,
    decreases n,
{
    if n > 0 {
        lemma_names(pairs, (n - 1) as nat, name);
        if pairs[n - 1].0@ == name {
        } else if pairs_map(pairs, (n - 1) as nat).dom().contains(name) {
            let i = choose|i: int| 0 <= i < n - 1 && (#[trigger] pairs[i]).0@ == name;
            assert(0 <= i < n && pairs[i].0@ == name);
        }
    }
}

/// Where names are distinct, a pair's value is what its name maps to.
proof fn lemma_value_at(pairs: Seq<(String, String)>, n: nat, at: int)
    requires
        distinct_names(pairs),
        0 <= at < n <= pairs.len(),
    ensures
        pairs_map(pairs, n).dom().contains(pairs[at].0@),
        pairs_map(pairs, n)[pairs[at].0@] == pairs[at].1@,
    decreases n,
{
    if at < n - 1 {
        lemma_value_at(pairs, (n - 1) as nat, at);
    }
}

/// Pairs that agree on the first `n` places stand for the same mapping there.
proof fn lemma_same_start(a: Seq<(String, String)>, b: Seq<(String, String)>, n: nat)
    requires
        n <= a.len(),
        n <= b.len(),
        forall|i: int| 0 <= i < n ==> a[i] == b[i],
    ensures
        pairs_map(a, n) == pairs_map(b, n),
    decreases n,
{
    if n > 0 {
        lemma_same_start(a, b, (n - 1) as nat);
    }
}

/// Replacing the value of the pair at `at` replaces what its name maps to.
proof fn lemma_replace(
    pairs: Seq<(String, String)>,
    at: int,
    name: String,
    value: String,
    n: nat,
)
    requires
        distinct_names(pairs),
        0 <= at < pairs.len(),
        name@ == pairs[at].0@,
        at < n <= pairs.len(),
    ensures
        pairs_map(pairs.update(at, (name, value)), n) =~= pairs_map(pairs, n).insert(
            name@,
            value@,
        ),
    decreases n,
{
    let changed = pairs.update(at, (name, value));
    if n == at + 1 {
        lemma_same_start(pairs, changed, at as nat);
    } else {
        lemma_replace(pairs, at, name, value, (n - 1) as nat);
        assert(pairs[n - 1].0@ != pairs[at].0@);
    }
}

impl Environment {
    #[verifier::type_invariant]
    spec fn names_are_distinct(self) -> bool {
        distinct_names(self.pairs@)
    }

    /// An environment without variables.
    pub fn new() -> (r: Self)
        ensures
            r@ == Map::<Seq<char>, Seq<char>>::empty(),
    {
        Environment { pairs: Vec::new() }
    }

    /// The number of variables.
    pub fn len(&self) -> (r: usize)
        ensures
            r == self@.len(),
            self@.dom().finite(),
    {
        proof {
            use_type_invariant(self);
            lemma_count(self.pairs@, self.pairs@.len());
        }
        self.pairs.len()
    }

    fn position(&self, name: &str) -> (r: Option<usize>)
        ensures
            match r {
                Some(at) => at < self.pairs@.len() && self.pairs@[at as int].0@ == name@,
                None => forall|i: int|
                    0 <= i < self.pairs@.len() ==> (#[trigger] self.pairs@[i]).0@ != name@,
            },
    {
        let mut i: usize = 0;
        while i < self.pairs.len()
            invariant
                i <= self.pairs@.len(),
                forall|j: int| 0 <= j < i ==> (#[trigger] self.pairs@[j]).0@ != name@,
            decreases self.pairs@.len() - i,
        {
            if same_text(self.pairs[i].0.as_str(), name) {
                return Some(i);
            }
            i += 1;
        }
        None
    }

    /// Whether the variable is set.
    pub fn contains_key(&self, name: &str) -> (r: bool)
        ensures
            r == self@.dom().contains(name@),
    {
        proof {
            lemma_names(self.pairs@, self.pairs@.len(), name@);
        }
        self.position(name).is_some()
    }

    /// The value of the variable, if it is set.
    pub fn get(&self, name: &str) -> (r: Option<&String>)
        ensures
            match r {
                Some(value) => self@.dom().contains(name@) && self@[name@] == value@,
                None => !self@.dom().contains(name@),
            },
    {
        proof {
            use_type_invariant(self);
            lemma_names(self.pairs@, self.pairs@.len(), name@);
        }
        match self.position(name) {
            Some(at) => {
                proof {
                    lemma_value_at(self.pairs@, self.pairs@.len(), at as int);
                }
                Some(&self.pairs[at].1)
            },
            None => None,
        }
    }

    /// Sets the variable, replacing the value it had.
    pub fn insert(&mut self, name: String, value: String)
        ensures
            final(self)@ == old(self)@.insert(name@, value@),
    {
        proof {
            use_type_invariant(&*self);
        }
        let found = self.position(name.as_str());
        let mut pairs: Vec<(String, String)> = Vec::new();
        std::mem::swap(&mut self.pairs, &mut pairs);
        match found {
            Some(at) => {
                proof {
                    lemma_replace(pairs@, at as int, name, value, pairs@.len());
                }
                pairs.set(at, (name, value));
            },
            None => {
                proof {
                    lemma_same_start(pairs@, pairs@.push((name, value)), pairs@.len());
                }
                pairs.push((name, value));
            },
        }
        self.pairs = pairs;
    }

    /// Sets the variable unless it is set already.
    pub fn insert_if_absent(&mut self, name: String, value: String)
        ensures
            final(self)@ == if old(self)@.dom().contains(name@) {
                old(self)@
            } else {
                old(self)@.insert(name@, value@)
            },
    {
        if !self.contains_key(name.as_str()) {
            self.insert(name, value);
        }
    }

    /// The variables as a list of names and values, each name once, in the
    /// order in which the names were first set.
    pub fn to_pairs(&self) -> (r: Vec<(String, String)>)
        ensures
            distinct_names(r@),
            pairs_map(r@, r@.len()) == self@,
    {
        proof {
            use_type_invariant(self);
        }
        let mut out: Vec<(String, String)> = Vec::new();
        let mut i: usize = 0;
        while i < self.pairs.len()
            invariant
                i <= self.pairs@.len(),
                out@.len() == i,
                forall|j: int|
                    0 <= j < i ==> (#[trigger] out@[j]).0@ == self.pairs@[j].0@ && out@[j].1@
                        == self.pairs@[j].1@,
            decreases self.pairs@.len() - i,
        {
            out.push((self.pairs[i].0.clone(), self.pairs[i].1.clone()));
            i += 1;
        }
        proof {
            lemma_same_views(out@, self.pairs@, out@.len());
        }
        out
    }

    /// The environment that the pairs give when they are set one after
    /// another, so that of two pairs of one name the later decides.
    pub fn from_pairs(pairs: Vec<(String, String)>) -> (r: Self)
        ensures
            r@ == pairs_map(pairs@, pairs@.len()),
    {
        let mut env = Environment::new();
        let mut i: usize = 0;
        while i < pairs.len()
            invariant
                i <= pairs@.len(),
                env@ == pairs_map(pairs@, i as nat),
            decreases pairs@.len() - i,
        {
            env.insert(pairs[i].0.clone(), pairs[i].1.clone());
            i += 1;
        }
        env
    }
}

impl Environment {
    /// Whether every variable of this environment has the same value in the
    /// other.
    fn is_within(&self, other: &Environment) -> (r: bool)
        ensures
            r == (forall|name: Seq<char>| #[trigger]
                self@.dom().contains(name) ==> other@.dom().contains(name) && other@[name]
                    == self@[name]),
    {
        proof {
            use_type_invariant(self);
        }
        let mut i: usize = 0;
        while i < self.pairs.len()
            invariant
                i <= self.pairs@.len(),
                distinct_names(self.pairs@),
                forall|j: int|
                    0 <= j < i ==> other@.dom().contains((#[trigger] self.pairs@[j]).0@)
                        && other@[self.pairs@[j].0@] == self.pairs@[j].1@,
            decreases self.pairs@.len() - i,
        {
            proof {
                lemma_value_at(self.pairs@, self.pairs@.len(), i as int);
                assert(self@.dom().contains(self.pairs@[i as int].0@));
                assert(self@[self.pairs@[i as int].0@] == self.pairs@[i as int].1@);
            }
            match other.get(self.pairs[i].0.as_str()) {
                Some(value) => {
                    if !same_text(value.as_str(), self.pairs[i].1.as_str()) {
                        return false;
                    }
                },
                None => {
                    return false;
                },
            }
            i += 1;
        }
        proof {
            assert forall|name: Seq<char>| #[trigger]
                self@.dom().contains(name) implies other@.dom().contains(name) && other@[name]
                == self@[name] by {
                lemma_names(self.pairs@, self.pairs@.len(), name);
                let j = choose|j: int|
                    0 <= j < self.pairs@.len() && (#[trigger] self.pairs@[j]).0@ == name;
                lemma_value_at(self.pairs@, self.pairs@.len(), j);
            }
        }
        true
    }

    /// Whether two environments hold the same variables with the same values.
    pub fn same_as(&self, other: &Environment) -> (r: bool)
        ensures
            r == (self@ == other@),
    {
        let r = self.is_within(other) && other.is_within(self);
        proof {
            if r {
                assert(self@ =~= other@);
            }
        }
        r
    }
}

impl PartialEq for Environment {
    fn eq(&self, other: &Self) -> (r: bool) {
        self.same_as(other)
    }
}

impl vstd::std_specs::cmp::PartialEqSpecImpl for Environment {
    open spec fn obeys_eq_spec() -> bool {
        true
    }

    open spec fn eq_spec(&self, other: &Self) -> bool {
        self@ == other@
    }
}

impl Clone for Environment {
    fn clone(&self) -> (r: Self)
        ensures
            r@ == self@,
    {
        Environment { pairs: self.to_pairs() }
    }
}

/// Lists that hold the same texts place by place stand for the same mapping.
proof fn lemma_same_views(a: Seq<(String, String)>, b: Seq<(String, String)>, n: nat)
    requires
        n <= a.len(),
        n <= b.len(),
        forall|i: int| 0 <= i < n ==> (#[trigger] a[i]).0@ == b[i].0@ && a[i].1@ == b[i].1@,
    ensures
        pairs_map(a, n) == pairs_map(b, n),
        a.len() == b.len() && n == a.len() && distinct_names(b) ==> distinct_names(a),
    decreases n,
{
    if n > 0 {
        lemma_same_views(a, b, (n - 1) as nat);
    }
}

/// Distinct names make the mapping as large as the list.
proof fn lemma_count(pairs: Seq<(String, String)>, n: nat)
    requires
        distinct_names(pairs),
        n <= pairs.len(),
    ensures
        pairs_map(pairs, n).dom().finite(),
        pairs_map(pairs, n).len() == n,
    decreases n,
{
    if n > 0 {
        lemma_count(pairs, (n - 1) as nat);
        lemma_names(pairs, (n - 1) as nat, pairs[n - 1].0@);
    }
}

} // verus!
