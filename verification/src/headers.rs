//! Ordered container of HTTP header entries.
//!
//! Entries are (name, value) pairs kept in insertion order; duplicate names
//! are allowed. Names are compared by exact equality, never case-folded.

use vstd::prelude::*;
use vstd::string::StringExecFns;

verus! {

/// An ordered sequence of (name, value) header entries.
///
/// Insertion order is preserved and duplicates survive unless explicitly
/// merged by `set` or `append`.
pub struct Headers {
    list: Vec<(String, String)>,
}

impl View for Headers {
    type V = Seq<(Seq<char>, Seq<char>)>;

    closed spec fn view(&self) -> Seq<(Seq<char>, Seq<char>)> {
        Seq::new(self.list@.len(), |i: int| (self.list@[i].0@, self.list@[i].1@))
    }
}

/// Index of the first entry of `hs` whose name is `name`, or `-1` if no
/// entry has that name.
pub open spec fn first_match(hs: Seq<(Seq<char>, Seq<char>)>, name: Seq<char>) -> int
    decreases hs.len(),
{
    if hs.len() == 0 {
        -1
    } else if hs[0].0 == name {
        0
    } else {
        let rest = first_match(hs.drop_first(), name);
        if rest == -1 {
            -1
        } else {
            rest + 1
        }
    }
}

/// `first_match` returns `-1` exactly when no entry has the name; otherwise
/// it returns the least index whose entry has the name.
pub proof fn lemma_first_match(hs: Seq<(Seq<char>, Seq<char>)>, name: Seq<char>)
    ensures
        first_match(hs, name) == -1 <==> (forall|j: int| 0 <= j < hs.len() ==> hs[j].0 != name),
        first_match(hs, name) != -1 ==> {
            let i = first_match(hs, name);
            &&& 0 <= i < hs.len()
            &&& hs[i].0 == name
            &&& forall|j: int| 0 <= j < i ==> hs[j].0 != name
        },
    decreases hs.len(),
{
    if hs.len() == 0 {
    } else if hs[0].0 == name {
    } else {
        lemma_first_match(hs.drop_first(), name);
        assert forall|j: int| 1 <= j < hs.len() implies hs[j] == hs.drop_first()[j - 1] by {}
    }
}

/// Law: adding an entry leaves every existing entry at its place, unchanged,
/// and puts the new entry last. A container built by `add` alone therefore
/// holds exactly the added entries in insertion order, duplicates included,
/// and iteration — which yields the view in index order — yields them in
/// that order.
pub proof fn lemma_insertion_order(
    hs: Seq<(Seq<char>, Seq<char>)>,
    e: (Seq<char>, Seq<char>),
    k: int,
)
    requires
        0 <= k < hs.len(),
    ensures
        hs.push(e).len() == hs.len() + 1,
        hs.push(e)[k] == hs[k],
        hs.push(e)[hs.len() as int] == e,
{
}

impl Headers {
    /// A container with no entries.
    pub fn new() -> (r: Headers)
        ensures
            r@ == Seq::<(Seq<char>, Seq<char>)>::empty(),
    {
        let r = Headers { list: Vec::new() };
        proof {
            assert(r@ =~= Seq::<(Seq<char>, Seq<char>)>::empty());
        }
        r
    }

    /// Number of entries.
    pub fn len(&self) -> (n: usize)
        ensures
            n == self@.len(),
    {
        self.list.len()
    }

    /// The entry at position `i`, in insertion order.
    pub fn get(&self, i: usize) -> (e: &(String, String))
        requires
            i < self@.len(),
        ensures
            e.0@ == self@[i as int].0,
            e.1@ == self@[i as int].1,
    {
        &self.list[i]
    }

    /// Appends a new entry unconditionally; an entry with the same name may
    /// already be present and survives.
    pub fn add(&mut self, name: &str, value: &str)
        ensures
            final(self)@ == old(self)@.push((name@, value@)),
    {
        self.list.push((name.to_owned(), value.to_owned()));
        proof {
            assert(final(self)@ =~= old(self)@.push((name@, value@)));
        }
    }

    /// Replaces the value of the first entry whose name is exactly `name`,
    /// leaving every other entry (including later duplicates) untouched; with
    /// no matching entry, appends a new one.
    pub fn set(&mut self, name: &str, value: &str)
        ensures
            ({
                let hs = old(self)@;
                let i = first_match(hs, name@);
                if i == -1 {
                    final(self)@ == hs.push((name@, value@))
                } else {
                    final(self)@ == hs.update(i, (hs[i].0, value@))
                }
            }),
    {
        let name_owned: String = name.to_owned();
        let n: usize = self.list.len();
        let mut i: usize = 0;
        while i < n
            invariant
                n == self.list@.len(),
                i <= n,
                *self == *old(self),
                name_owned@ == name@,
                forall|j: int| 0 <= j < i ==> self@[j].0 != name@,
            decreases n - i,
        {
            if self.list[i].0 == name_owned {
                proof {
                    lemma_first_match(old(self)@, name@);
                    assert(first_match(old(self)@, name@) == i);
                }
                let entry = &mut self.list[i];
                entry.1 = value.to_owned();
                proof {
                    assert(self@ =~= old(self)@.update(
                        i as int,
                        (old(self)@[i as int].0, value@),
                    ));
                }
                return ;
            }
            i = i + 1;
        }
        proof {
            lemma_first_match(old(self)@, name@);
        }
        self.add(name, value);
    }

    /// Concatenates `"; "` and `value` onto the value of the first entry
    /// whose name is exactly `name`, leaving every other entry untouched;
    /// with no matching entry, appends a new one.
    pub fn append(&mut self, name: &str, value: &str)
        ensures
            ({
                let hs = old(self)@;
                let i = first_match(hs, name@);
                if i == -1 {
                    final(self)@ == hs.push((name@, value@))
                } else {
                    final(self)@ == hs.update(i, (hs[i].0, hs[i].1 + "; "@ + value@))
                }
            }),
    {
        let name_owned: String = name.to_owned();
        let n: usize = self.list.len();
        let mut i: usize = 0;
        while i < n
            invariant
                n == self.list@.len(),
                i <= n,
                *self == *old(self),
                name_owned@ == name@,
                forall|j: int| 0 <= j < i ==> self@[j].0 != name@,
            decreases n - i,
        {
            if self.list[i].0 == name_owned {
                proof {
                    assert(self@[i as int].0 == name@);
                    assert(old(self)@[i as int].0 == name@);
                    lemma_first_match(old(self)@, name@);
                    assert(first_match(old(self)@, name@) != -1);
                    assert(first_match(old(self)@, name@) == i);
                }
                let entry = &mut self.list[i];
                entry.1.append("; ");
                entry.1.append(value);
                proof {
                    assert(self@ =~= old(self)@.update(
                        i as int,
                        (old(self)@[i as int].0, old(self)@[i as int].1 + "; "@ + value@),
                    ));
                }
                return ;
            }
            i = i + 1;
        }
        proof {
            lemma_first_match(old(self)@, name@);
        }
        self.add(name, value);
    }

    /// An iterator over the entries, in insertion order.
    pub fn iter(&self) -> (it: ResponseHeadersIter<'_>)
        ensures
            it.entries() == self@,
            it.pos() == 0,
    {
        ResponseHeadersIter { headers: self, pos: 0 }
    }
}

/// Read-only cursor over a header container's entries, in insertion order.
///
/// It borrows the container, so the container cannot be mutated while the
/// cursor is alive.
pub struct ResponseHeadersIter<'res> {
    headers: &'res Headers,
    pos: usize,
}

impl<'res> ResponseHeadersIter<'res> {
    /// All entries of the underlying container.
    pub closed spec fn entries(&self) -> Seq<(Seq<char>, Seq<char>)> {
        self.headers@
    }

    /// How many entries have been yielded so far.
    pub closed spec fn pos(&self) -> int {
        self.pos as int
    }

    /// Yields the next entry in insertion order, or `None` after the last.
    pub fn next(&mut self) -> (r: Option<(&'res str, &'res str)>)
        ensures
            final(self).entries() == old(self).entries(),
            if old(self).pos() < old(self).entries().len() {
                &&& final(self).pos() == old(self).pos() + 1
                &&& r matches Some(e) && e.0@ == old(self).entries()[old(self).pos()].0
                    && e.1@ == old(self).entries()[old(self).pos()].1
            } else {
                &&& final(self).pos() == old(self).pos()
                &&& r is None
            },
    {
        if self.pos < self.headers.list.len() {
            let e = &self.headers.list[self.pos];
            self.pos = self.pos + 1;
            Some((e.0.as_str(), e.1.as_str()))
        } else {
            None
        }
    }
}

} // verus!
