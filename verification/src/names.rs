//! Sets of names, kept in the order in which the names were first added.

use vstd::prelude::*;

verus! {

/// The first of `wanted`, from index `from` on, that `have` lacks.
pub open spec fn first_missing_from(
    wanted: Seq<Seq<char>>,
    have: Seq<Seq<char>>,
    from: int,
) -> Option<Seq<char>>
    decreases wanted.len() - from,
{
    if from < 0 || from >= wanted.len() {
        None
    } else if !have.contains(wanted[from]) {
        Some(wanted[from])
    } else {
        first_missing_from(wanted, have, from + 1)
    }
}

/// The first of `wanted` that `have` lacks, if it lacks any.
pub open spec fn first_missing(wanted: Seq<Seq<char>>, have: Seq<Seq<char>>) -> Option<
    Seq<char>,
> {
    first_missing_from(wanted, have, 0)
}

/// Nothing is missing exactly when `have` holds every name from `from` on,
/// and a missing name is one of `wanted` that `have` lacks.
pub proof fn lemma_first_missing_from(wanted: Seq<Seq<char>>, have: Seq<Seq<char>>, from: int)
    requires
        0 <= from,
    ensures
        first_missing_from(wanted, have, from) is None <==> forall|i: int|
            from <= i < wanted.len() ==> have.contains(#[trigger] wanted[i]),
        first_missing_from(wanted, have, from) matches Some(name) ==> wanted.contains(name)
            && !have.contains(name),
    decreases wanted.len() - from,
{
    if from < wanted.len() {
        lemma_first_missing_from(wanted, have, from + 1);
    }
}

/// A set of names. Its view lists the names in the order of their first
/// insertion, each once.
#[derive(Debug)]
pub struct NameSet {
    pub names: Vec<String>,
}

impl View for NameSet {
    type V = Seq<Seq<char>>;

    open spec fn view(&self) -> Seq<Seq<char>> {
        Seq::new(self.names@.len(), |i: int| self.names@[i]@)
    }
}

impl NameSet {
    /// No name is listed twice.
    pub open spec fn wf(&self) -> bool {
        self@.no_duplicates()
    }

    /// The empty set.
    pub fn new() -> (r: Self)
        ensures
            r@ == Seq::<Seq<char>>::empty(),
            r.wf(),
    {
        let r = NameSet { names: Vec::new() };
        assert(r@ =~= Seq::<Seq<char>>::empty());
        r
    }

    /// How many names the set holds.
    pub fn len(&self) -> (r: usize)
        ensures
            r == self@.len(),
    {
        self.names.len()
    }

    /// Whether the set holds `name`.
    pub fn contains(&self, name: &String) -> (r: bool)
        ensures
            r == self@.contains(name@),
    {
        let mut i: usize = 0;
        while i < self.names.len()
            invariant
                i <= self.names@.len(),
                forall|j: int| 0 <= j < i ==> self@[j] != name@,
            decreases self.names@.len() - i,
        {
            if self.names[i] == *name {
                assert(self@[i as int] == name@);
                return true;
            }
            i += 1;
        }
        false
    }

    /// Adds `name` unless the set holds it already, and says whether it was
    /// added.
    pub fn insert(&mut self, name: String) -> (r: bool)
        requires
            old(self).wf(),
        ensures
            final(self).wf(),
            r == !old(self)@.contains(name@),
            final(self)@ == if r {
                old(self)@.push(name@)
            } else {
                old(self)@
            },
    {
        if self.contains(&name) {
            false
        } else {
            let ghost before = self@;
            self.names.push(name);
            assert(self@ =~= before.push(name@));
            true
        }
    }

    /// The first name of this set that `other` lacks, if it lacks any.
    pub fn first_missing_in(&self, other: &NameSet) -> (r: Option<String>)
        ensures
            match first_missing(self@, other@) {
                Some(name) => r matches Some(found) && found@ == name,
                None => r is None,
            },
    {
        let mut i: usize = 0;
        while i < self.names.len()
            invariant
                i <= self.names@.len(),
                first_missing(self@, other@) == first_missing_from(self@, other@, i as int),
            decreases self.names@.len() - i,
        {
            if !other.contains(&self.names[i]) {
                return Some(self.names[i].clone());
            }
            i += 1;
        }
        None
    }
}

} // verus!
