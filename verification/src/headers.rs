//! Headers as a helper prints them: distinct names, each with one value.
//!
//! A value may be a credential, so nothing here can be formatted for debugging.

use vstd::prelude::*;

use crate::text::same;

verus! {

/// The map that a list of bindings writes, later bindings first.
pub open spec fn bindings(entries: Seq<(Seq<char>, Seq<char>)>) -> Map<Seq<char>, Seq<char>>
    decreases entries.len(),
{
    if entries.len() == 0 {
        Map::empty()
    } else {
        bindings(entries.drop_last()).insert(entries.last().0, entries.last().1)
    }
}

/// No name occurs twice.
pub open spec fn distinct_names<V>(entries: Seq<(Seq<char>, V)>) -> bool {
    forall|i: int, j: int|
        0 <= i < j < entries.len() ==> (#[trigger] entries[i]).0 != (#[trigger] entries[j]).0
}

/// The texts of a list of bindings.
pub open spec fn entry_texts(entries: Seq<(String, String)>) -> Seq<(Seq<char>, Seq<char>)> {
    entries.map_values(|entry: (String, String)| (entry.0@, entry.1@))
}

/// Header values by header name.
pub struct Headers {
    entries: Vec<(String, String)>,
}

impl View for Headers {
    type V = Map<Seq<char>, Seq<char>>;

    open spec fn view(&self) -> Map<Seq<char>, Seq<char>> {
        bindings(self.entries())
    }
}

impl Headers {
    /// The bindings, in the order in which they are sent.
    pub closed spec fn entries(&self) -> Seq<(Seq<char>, Seq<char>)> {
        entry_texts(self.entries@)
    }

    /// No name is bound twice.
    #[verifier::type_invariant]
    pub closed spec fn wf(&self) -> bool {
        distinct_names(self.entries())
    }

    /// No headers.
    pub fn new() -> (headers: Self)
        ensures
            headers.entries() == Seq::<(Seq<char>, Seq<char>)>::empty(),
            headers@ == Map::<Seq<char>, Seq<char>>::empty(),
    {
        let headers = Headers { entries: Vec::new() };
        assert(headers.entries() =~= Seq::<(Seq<char>, Seq<char>)>::empty());
        headers
    }

    /// How many names are bound.
    pub fn len(&self) -> (n: usize)
        ensures
            n == self.entries().len(),
            n == self@.dom().len(),
    {
        proof {
            use_type_invariant(self);
            distinct_bindings(self.entries());
        }
        self.entries.len()
    }

    /// The binding at a position.
    pub fn entry(&self, i: usize) -> (entry: (&str, &str))
        requires
            i < self.entries().len(),
        ensures
            (entry.0@, entry.1@) == self.entries()[i as int],
    {
        let (name, value) = &self.entries[i];
        (name.as_str(), value.as_str())
    }

    /// The value bound to `name`.
    pub fn get(&self, name: &str) -> (value: Option<&String>)
        ensures
            match value {
                Some(value) => self@.contains_key(name@) && self@[name@] == value@,
                None => !self@.contains_key(name@),
            },
    {
        proof {
            use_type_invariant(self);
            distinct_bindings(self.entries());
        }
        for i in 0..self.entries.len()
            invariant
                forall|j: int| 0 <= j < i ==> (#[trigger] self.entries()[j]).0 != name@,
        {
            assert(self.entries()[i as int] == (self.entries@[i as int].0@, self.entries@[i as int].1@));
            if same(self.entries[i].0.as_str(), name) {
                proof {
                    use_type_invariant(self);
                    distinct_bindings(self.entries());
                }
                return Some(&self.entries[i].1);
            }
        }
        None
    }

    /// Headers of a list of bindings whose names are distinct.
    pub fn of(entries: Vec<(String, String)>) -> (headers: Self)
        requires
            distinct_names(entry_texts(entries@)),
        ensures
            headers.entries() == entry_texts(entries@),
    {
        Headers { entries }
    }
}

/// A list of bindings whose names are distinct writes a map that binds each of its
/// names to its own value, and nothing else.
pub proof fn distinct_bindings(entries: Seq<(Seq<char>, Seq<char>)>)
    requires
        distinct_names(entries),
    ensures
        bindings(entries).dom().finite(),
        bindings(entries).dom().len() == entries.len(),
        forall|i: int|
            0 <= i < entries.len() ==> bindings(entries).contains_key((#[trigger] entries[i]).0)
                && bindings(entries)[entries[i].0] == entries[i].1,
        forall|name: Seq<char>| #[trigger]
            bindings(entries).contains_key(name) ==> exists|i: int|
                0 <= i < entries.len() && (#[trigger] entries[i]).0 == name,
    decreases entries.len(),
{
    if entries.len() > 0 {
        let front = entries.drop_last();
        let last = entries.last();
        assert(distinct_names(front)) by {
            assert forall|i: int, j: int| 0 <= i < j < front.len() implies (
            #[trigger] front[i]).0 != (#[trigger] front[j]).0 by {
                assert(front[i] == entries[i] && front[j] == entries[j]);
            }
        }
        distinct_bindings(front);
        assert(!bindings(front).contains_key(last.0)) by {
            if bindings(front).contains_key(last.0) {
                let i = choose|i: int| 0 <= i < front.len() && (#[trigger] front[i]).0 == last.0;
                assert(front[i] == entries[i]);
                assert(entries[i].0 != entries[entries.len() - 1].0);
            }
        }
        assert forall|i: int| 0 <= i < entries.len() implies bindings(entries).contains_key(
            (#[trigger] entries[i]).0,
        ) && bindings(entries)[entries[i].0] == entries[i].1 by {
            if i < front.len() {
                assert(front[i] == entries[i]);
                assert(entries[i].0 != entries[entries.len() - 1].0);
            }
        }
        assert forall|name: Seq<char>| #[trigger] bindings(entries).contains_key(name) implies exists|
            i: int,
        |
            0 <= i < entries.len() && (#[trigger] entries[i]).0 == name by {
            if name == last.0 {
                assert(entries[entries.len() - 1].0 == name);
            } else {
                assert(bindings(front).contains_key(name));
                let i = choose|i: int| 0 <= i < front.len() && (#[trigger] front[i]).0 == name;
                assert(entries[i] == front[i]);
            }
        }
    }
}

/// The texts of a list of bindings are those of its strings, in its order, each whole.
pub proof fn texts_are_those_of_the_strings(entries: Seq<(String, String)>, i: int)
    requires
        0 <= i < entries.len(),
    ensures
        entry_texts(entries).len() == entries.len(),
        entry_texts(entries)[i].0 == entries[i].0@,
        entry_texts(entries)[i].1 == entries[i].1@,
{
}

/// A binding behind all others is found under its name, whatever the others bind, and
/// changes no other name.
pub proof fn the_last_binding_of_a_name_counts(
    entries: Seq<(Seq<char>, Seq<char>)>,
    name: Seq<char>,
    value: Seq<char>,
    other: Seq<char>,
)
    requires
        other != name,
    ensures
        bindings(entries.push((name, value))).contains_key(name),
        bindings(entries.push((name, value)))[name] == value,
        bindings(entries.push((name, value))).contains_key(other) <==> bindings(
            entries,
        ).contains_key(other),
        bindings(entries).contains_key(other) ==> bindings(entries.push((name, value)))[other]
            == bindings(entries)[other],
        bindings(Seq::<(Seq<char>, Seq<char>)>::empty()) == Map::<Seq<char>, Seq<char>>::empty(),
{
    assert(entries.push((name, value)).drop_last() =~= entries);
}

} // verus!
