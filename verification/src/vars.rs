//! Sets of variable names. The reference-count annotation pass threads these
//! through every expression; clone and drop markers carry them.

use vstd::prelude::*;

verus! {

broadcast use vstd::seq_lib::group_seq_properties;

/// The character sequences of a sequence of names.
pub open spec fn names_view(s: Seq<String>) -> Seq<Seq<char>> {
    Seq::new(s.len(), |i: int| s[i]@)
}

pub proof fn lemma_names_view_push(s: Seq<String>, x: String)
    ensures
        names_view(s.push(x)) == names_view(s).push(x@),
{
    assert(names_view(s.push(x)) =~= names_view(s).push(x@));
}

pub proof fn lemma_push_to_set(s: Seq<Seq<char>>, x: Seq<char>)
    ensures
        s.push(x).to_set() == s.to_set().insert(x),
{
    assert forall|a: Seq<char>| s.push(x).to_set().contains(a) implies s.to_set().insert(
        x,
    ).contains(a) by {
        let k = choose|k: int| 0 <= k < s.push(x).len() && s.push(x)[k] == a;
        if k < s.len() {
            assert(s[k] == a);
        }
    }
    assert forall|a: Seq<char>| s.to_set().insert(x).contains(a) implies s.push(x).to_set().contains(
        a,
    ) by {
        if a == x {
            assert(s.push(x)[s.len() as int] == a);
        } else {
            let k = choose|k: int| 0 <= k < s.len() && s[k] == a;
            assert(s.push(x)[k] == a);
        }
    }
    assert(s.push(x).to_set() =~= s.to_set().insert(x));
}

/// A set of variable names, kept as a vector; the view is the set of the
/// names' character sequences, so duplicates and order never matter.
#[derive(Debug)]
pub struct VariableSet {
    pub names: Vec<String>,
}

impl View for VariableSet {
    type V = Set<Seq<char>>;

    open spec fn view(&self) -> Set<Seq<char>> {
        names_view(self.names@).to_set()
    }
}

impl VariableSet {
    pub fn new() -> (s: Self)
        ensures
            s@ == Set::<Seq<char>>::empty(),
    {
        let s = VariableSet { names: Vec::new() };
        proof {
            assert(names_view(s.names@) =~= Seq::<Seq<char>>::empty());
            assert(s@ =~= Set::<Seq<char>>::empty());
        }
        s
    }

    pub fn singleton(name: &str) -> (s: Self)
        ensures
            s@ == Set::<Seq<char>>::empty().insert(name@),
    {
        let mut s = VariableSet::new();
        s.insert(name);
        s
    }

    pub fn contains_str(&self, name: &str) -> (r: bool)
        ensures
            r == self@.contains(name@),
    {
        self.contains(&name.to_owned())
    }

    pub fn contains(&self, name: &String) -> (r: bool)
        ensures
            r == self@.contains(name@),
    {
        let mut i: usize = 0;
        while i < self.names.len()
            invariant
                0 <= i <= self.names.len(),
                forall|k: int| 0 <= k < i ==> self.names[k]@ != name@,
            decreases self.names.len() - i,
        {
            if self.names[i] == *name {
                proof {
                    assert(names_view(self.names@)[i as int] == name@);
                    assert(self@.contains(name@));
                }
                return true;
            }
            i += 1;
        }
        proof {
            assert forall|s: Seq<char>| self@.contains(s) implies s != name@ by {
                let k = choose|k: int|
                    0 <= k < names_view(self.names@).len() && names_view(self.names@)[k] == s;
                assert(self.names[k]@ == s);
            }
        }
        false
    }

    /// Adds one name.
    pub fn insert(&mut self, name: &str)
        ensures
            final(self)@ == old(self)@.insert(name@),
    {
        let ghost names0 = self.names@;
        self.names.push(name.to_owned());
        proof {
            assert(self.names@ == names0.push(self.names@.last()));
            lemma_names_view_push(names0, self.names@.last());
            lemma_push_to_set(names_view(names0), name@);
        }
    }

    /// A copy of this set with one more name.
    pub fn with(&self, name: &str) -> (r: Self)
        ensures
            r@ == self@.insert(name@),
    {
        let mut r = self.duplicate();
        r.insert(name);
        r
    }

    /// The names of `self` that `other` lacks.
    pub fn difference(&self, other: &Self) -> (r: Self)
        ensures
            r@ == self@.difference(other@),
    {
        let mut names: Vec<String> = Vec::new();
        let mut i: usize = 0;
        while i < self.names.len()
            invariant
                0 <= i <= self.names.len(),
                names_view(names@).to_set() == names_view(self.names@.take(i as int)).to_set()
                    .difference(other@),
            decreases self.names.len() - i,
        {
            let ghost prefix = self.names@.take(i as int);
            let ghost names0 = names@;
            if !other.contains(&self.names[i]) {
                names.push(self.names[i].clone());
                proof {
                    assert(names@ == names0.push(names@.last()));
                    assert(names@.last()@ == self.names[i as int]@);
                    lemma_names_view_push(names0, names@.last());
                    lemma_push_to_set(names_view(names0), names@.last()@);
                }
            }
            proof {
                assert(self.names@.take(i + 1 as int) =~= prefix.push(self.names@[i as int]));
                lemma_names_view_push(prefix, self.names@[i as int]);
                lemma_push_to_set(names_view(prefix), self.names@[i as int]@);
                assert(names_view(names@).to_set() =~= names_view(
                    self.names@.take(i + 1 as int),
                ).to_set().difference(other@));
            }
            i += 1;
        }
        proof {
            assert(self.names@.take(self.names.len() as int) =~= self.names@);
        }
        let r = VariableSet { names };
        r
    }

    /// The union of the two sets.
    pub fn union(&self, other: &Self) -> (r: Self)
        ensures
            r@ == self@.union(other@),
    {
        let mut names = self.clone_names();
        let mut i: usize = 0;
        while i < other.names.len()
            invariant
                0 <= i <= other.names.len(),
                names_view(names@).to_set() == self@.union(
                    names_view(other.names@.take(i as int)).to_set(),
                ),
            decreases other.names.len() - i,
        {
            let ghost prefix = other.names@.take(i as int);
            let ghost names0 = names@;
            names.push(other.names[i].clone());
            proof {
                assert(names@ == names0.push(names@.last()));
                assert(names@.last()@ == other.names[i as int]@);
                lemma_names_view_push(names0, names@.last());
                lemma_push_to_set(names_view(names0), names@.last()@);
                assert(other.names@.take(i + 1 as int) =~= prefix.push(other.names@[i as int]));
                lemma_names_view_push(prefix, other.names@[i as int]);
                lemma_push_to_set(names_view(prefix), other.names@[i as int]@);
                assert(names_view(names@).to_set() =~= self@.union(
                    names_view(other.names@.take(i + 1 as int)).to_set(),
                ));
            }
            i += 1;
        }
        proof {
            assert(other.names@.take(other.names.len() as int) =~= other.names@);
        }
        let r = VariableSet { names };
        r
    }

    /// A copy of this set without one name.
    pub fn without(&self, name: &String) -> (r: Self)
        ensures
            r@ == self@.remove(name@),
    {
        let single = VariableSet::singleton(name.as_str());
        let r = self.difference(&single);
        proof {
            assert(r@ =~= self@.remove(name@));
        }
        r
    }

    pub fn is_empty(&self) -> (r: bool)
        ensures
            r == (self@ == Set::<Seq<char>>::empty()),
    {
        if self.names.len() == 0 {
            proof {
                assert(names_view(self.names@) =~= Seq::<Seq<char>>::empty());
                assert(self@ =~= Set::<Seq<char>>::empty());
            }
            true
        } else {
            proof {
                assert(self@.contains(names_view(self.names@)[0]));
            }
            false
        }
    }

    pub fn len(&self) -> (r: usize)
        ensures
            r == self.names.len(),
    {
        self.names.len()
    }

    /// The name at one vector position; every position holds a member of the set.
    pub fn name_at(&self, i: usize) -> (r: &String)
        requires
            i < self.names.len(),
        ensures
            self@.contains(r@),
    {
        proof {
            assert(names_view(self.names@)[i as int] == self.names[i as int]@);
        }
        &self.names[i]
    }

    fn clone_names(&self) -> (r: Vec<String>)
        ensures
            names_view(r@) == names_view(self.names@),
    {
        let mut r: Vec<String> = Vec::new();
        let mut i: usize = 0;
        while i < self.names.len()
            invariant
                0 <= i <= self.names.len(),
                names_view(r@) == names_view(self.names@.take(i as int)),
            decreases self.names.len() - i,
        {
            let ghost r0 = r@;
            let ghost prefix = self.names@.take(i as int);
            r.push(self.names[i].clone());
            proof {
                assert(r@ == r0.push(r@.last()));
                lemma_names_view_push(r0, r@.last());
                assert(self.names@.take(i + 1 as int) =~= prefix.push(self.names@[i as int]));
                lemma_names_view_push(prefix, self.names@[i as int]);
                assert(names_view(r@) =~= names_view(self.names@.take(i + 1 as int)));
            }
            i += 1;
        }
        proof {
            assert(self.names@.take(self.names.len() as int) =~= self.names@);
        }
        r
    }

    /// A copy with the same view.
    pub fn duplicate(&self) -> (r: Self)
        ensures
            r@ == self@,
    {
        VariableSet { names: self.clone_names() }
    }
}

impl Clone for VariableSet {
    fn clone(&self) -> (r: Self)
        ensures
            r@ == self@,
    {
        self.duplicate()
    }
}

impl PartialEq for VariableSet {
    fn eq(&self, other: &Self) -> (r: bool) {
        let mut i: usize = 0;
        while i < self.names.len()
            invariant
                0 <= i <= self.names.len(),
                forall|k: int| 0 <= k < i ==> other@.contains(names_view(self.names@)[k]),
            decreases self.names.len() - i,
        {
            if !other.contains(&self.names[i]) {
                proof {
                    assert(self@.contains(names_view(self.names@)[i as int]));
                }
                return false;
            }
            i += 1;
        }
        let mut j: usize = 0;
        while j < other.names.len()
            invariant
                0 <= j <= other.names.len(),
                forall|k: int| 0 <= k < self.names.len() ==> other@.contains(
                    names_view(self.names@)[k],
                ),
                forall|k: int| 0 <= k < j ==> self@.contains(names_view(other.names@)[k]),
            decreases other.names.len() - j,
        {
            if !self.contains(&other.names[j]) {
                proof {
                    assert(other@.contains(names_view(other.names@)[j as int]));
                }
                return false;
            }
            j += 1;
        }
        proof {
            assert forall|s: Seq<char>| self@.contains(s) implies other@.contains(s) by {
                let k = choose|k: int|
                    0 <= k < names_view(self.names@).len() && names_view(self.names@)[k] == s;
            }
            assert forall|s: Seq<char>| other@.contains(s) implies self@.contains(s) by {
                let k = choose|k: int|
                    0 <= k < names_view(other.names@).len() && names_view(other.names@)[k] == s;
            }
            assert(self@ =~= other@);
        }
        true
    }
}

impl vstd::std_specs::cmp::PartialEqSpecImpl for VariableSet {
    open spec fn obeys_eq_spec() -> bool {
        true
    }

    open spec fn eq_spec(&self, other: &Self) -> bool {
        self@ == other@
    }
}

impl Eq for VariableSet {

}

} // verus!
