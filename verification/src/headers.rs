//! Header collections: an insertion-ordered list of name/value pairs in which
//! no name occurs twice.

use crate::text::{same, same_ignoring_case, upper};
use vstd::prelude::*;

verus! {

/// Whether some entry of `h` is named `name`.
pub open spec fn has_name(h: Seq<(Seq<u8>, Seq<u8>)>, name: Seq<u8>) -> bool {
    exists|i: int| 0 <= i < h.len() && (#[trigger] h[i]).0 == name
}

/// The position of an entry of `h` named `name`.
pub open spec fn slot_of(h: Seq<(Seq<u8>, Seq<u8>)>, name: Seq<u8>) -> int {
    choose|i: int| 0 <= i < h.len() && (#[trigger] h[i]).0 == name
}

/// The value stored under `name`, if there is one.
pub open spec fn value_of(h: Seq<(Seq<u8>, Seq<u8>)>, name: Seq<u8>) -> Option<Seq<u8>> {
    if has_name(h, name) {
        Some(h[slot_of(h, name)].1)
    } else {
        None
    }
}

/// `h` after storing `value` under `name`: an entry of that name keeps its
/// place and takes the new value, a new name goes to the end.
pub open spec fn put(h: Seq<(Seq<u8>, Seq<u8>)>, name: Seq<u8>, value: Seq<u8>) -> Seq<
    (Seq<u8>, Seq<u8>),
> {
    if has_name(h, name) {
        h.update(slot_of(h, name), (name, value))
    } else {
        h.push((name, value))
    }
}

/// No name occurs twice in `h`.
pub open spec fn distinct(h: Seq<(Seq<u8>, Seq<u8>)>) -> bool {
    forall|i: int, j: int| 0 <= i < j < h.len() ==> (#[trigger] h[i]).0 != (#[trigger] h[j]).0
}

/// Whether some entry of `h` has a name that equals `name` up to ASCII case.
pub open spec fn has_name_ignoring_case(h: Seq<(Seq<u8>, Seq<u8>)>, name: Seq<u8>) -> bool {
    exists|i: int| 0 <= i < h.len() && upper((#[trigger] h[i]).0) == upper(name)
}

/// In a list without repeated names, a name determines its position.
pub proof fn lemma_slot_unique(h: Seq<(Seq<u8>, Seq<u8>)>, name: Seq<u8>, i: int)
    requires
        distinct(h),
        0 <= i < h.len(),
        h[i].0 == name,
    ensures
        has_name(h, name),
        slot_of(h, name) == i,
        value_of(h, name) == Some(h[i].1),
{
}

/// Storing a value keeps names distinct, makes that value the one found under
/// its name, and leaves every other name as it was.
pub proof fn lemma_put(h: Seq<(Seq<u8>, Seq<u8>)>, name: Seq<u8>, value: Seq<u8>)
    requires
        distinct(h),
    ensures
        distinct(put(h, name, value)),
        value_of(put(h, name, value), name) == Some(value),
        forall|other: Seq<u8>|
            other != name ==> #[trigger] value_of(put(h, name, value), other) == value_of(
                h,
                other,
            ),
        put(h, name, value).len() == if has_name(h, name) {
            h.len()
        } else {
            h.len() + 1
        },
{
    let g = put(h, name, value);
    let at = if has_name(h, name) {
        slot_of(h, name)
    } else {
        h.len() as int
    };
    assert forall|i: int| 0 <= i < g.len() && i != at implies g[i] == h[i] && g[i].0 != name by {}
    assert(distinct(g));
    lemma_slot_unique(g, name, at);
    assert forall|other: Seq<u8>| other != name implies #[trigger] value_of(g, other)
        == value_of(h, other) by {
        if has_name(h, other) {
            let k = slot_of(h, other);
            lemma_slot_unique(g, other, k);
            lemma_slot_unique(h, other, k);
        }
    }
}

/// An insertion-ordered collection of headers in which no name occurs twice.
#[derive(Debug, Clone, PartialEq, Eq)]
pub struct Headers {
    entries: Vec<(Vec<u8>, Vec<u8>)>,
}

impl View for Headers {
    type V = Seq<(Seq<u8>, Seq<u8>)>;

    closed spec fn view(&self) -> Seq<(Seq<u8>, Seq<u8>)> {
        Seq::new(self.entries@.len(), |i: int| (self.entries@[i].0@, self.entries@[i].1@))
    }
}

impl Headers {
    /// The collection's invariant: no name occurs twice.
    pub open spec fn wf(&self) -> bool {
        distinct(self@)
    }

    /// An empty collection.
    pub fn new() -> (h: Headers)
        ensures
            h@ == Seq::<(Seq<u8>, Seq<u8>)>::empty(),
            h.wf(),
    {
        let h = Headers { entries: Vec::new() };
        h
    }

    /// The number of headers held.
    pub fn len(&self) -> (n: usize)
        ensures
            n == self@.len(),
    {
        self.entries.len()
    }

    /// The name of the header at position `i`.
    pub fn name_at(&self, i: usize) -> (name: &Vec<u8>)
        requires
            i < self@.len(),
        ensures
            name@ == self@[i as int].0,
    {
        &self.entries[i].0
    }

    /// The value of the header at position `i`.
    pub fn value_at(&self, i: usize) -> (value: &Vec<u8>)
        requires
            i < self@.len(),
        ensures
            value@ == self@[i as int].1,
    {
        &self.entries[i].1
    }

    /// The position of the header named `name`, if there is one.
    fn position(&self, name: &[u8]) -> (r: Option<usize>)
        ensures
            match r {
                Some(i) => i < self@.len() && self@[i as int].0 == name@,
                None => !has_name(self@, name@),
            },
    {
        let mut i: usize = 0;
        while i < self.entries.len()
            invariant
                i <= self.entries@.len(),
                forall|j: int| 0 <= j < i ==> (#[trigger] self@[j]).0 != name@,
            decreases self.entries@.len() - i,
        {
            if same(self.entries[i].0.as_slice(), name) {
                return Some(i);
            }
            i += 1;
        }
        None
    }

    /// Looks a header up by its exact name.
    pub fn get(&self, name: &[u8]) -> (r: Option<&Vec<u8>>)
        requires
            self.wf(),
        ensures
            match value_of(self@, name@) {
                Some(v) => r is Some && r.unwrap()@ == v,
                None => r is None,
            },
    {
        match self.position(name) {
            Some(i) => {
                proof {
                    lemma_slot_unique(self@, name@, i as int);
                }
                Some(&self.entries[i].1)
            },
            None => None,
        }
    }

    /// Stores `value` under `name`, replacing the value of a header of that
    /// name where there is one.
    pub fn insert(&mut self, name: Vec<u8>, value: Vec<u8>)
        requires
            old(self).wf(),
        ensures
            final(self).wf(),
            final(self)@ == put(old(self)@, name@, value@),
    {
        let ghost before = self@;
        proof {
            lemma_put(before, name@, value@);
        }
        match self.position(name.as_slice()) {
            Some(i) => {
                proof {
                    lemma_slot_unique(before, name@, i as int);
                }
                self.entries.set(i, (name, value));
                assert(self@ =~= put(before, name@, value@));
            },
            None => {
                self.entries.push((name, value));
                assert(self@ =~= put(before, name@, value@));
            },
        }
    }

    /// Whether a header is held whose name equals `name` up to ASCII case.
    pub fn declares(&self, name: &[u8]) -> (r: bool)
        ensures
            r == has_name_ignoring_case(self@, name@),
    {
        let mut i: usize = 0;
        while i < self.entries.len()
            invariant
                i <= self.entries@.len(),
                forall|j: int| 0 <= j < i ==> upper((#[trigger] self@[j]).0) != upper(name@),
            decreases self.entries@.len() - i,
        {
            if same_ignoring_case(self.entries[i].0.as_slice(), name) {
                assert(upper(self@[i as int].0) == upper(name@));
                return true;
            }
            i += 1;
        }
        false
    }
}

} // verus!
