//! A store of destinations under generated short codes.
//!
//! The pairs of code and destination are kept in the order in which they
//! were stored and looked up from the newest; the map that they stand for
//! is what the contracts speak of. A hash map with strings for keys would
//! do the same work, but nothing can be proved of one: the verifier knows
//! how a hash map behaves only for keys that are integers.

use vstd::prelude::*;
use crate::shortener::{is_code_of, Shortener};

verus! {

/// The map that a sequence of stored pairs stands for: a later pair
/// replaces an earlier one with the same code.
pub open spec fn map_of(entries: Seq<(Seq<char>, Seq<char>)>) -> Map<Seq<char>, Seq<char>>
    decreases entries.len(),
{
    if entries.len() == 0 {
        Map::empty()
    } else {
        map_of(entries.drop_last()).insert(entries.last().0, entries.last().1)
    }
}

/// Where no pair from position `i` on has the code `id`, the map holds for
/// `id` what the pairs before `i` say.
pub proof fn lemma_later_pairs_do_not_matter(
    entries: Seq<(Seq<char>, Seq<char>)>,
    i: int,
    id: Seq<char>,
)
    requires
        0 <= i <= entries.len(),
        forall|j: int| i <= j < entries.len() ==> (#[trigger] entries[j]).0 != id,
    ensures
        map_of(entries).contains_key(id) == map_of(entries.subrange(0, i)).contains_key(id),
        map_of(entries).contains_key(id) ==> map_of(entries)[id] == map_of(
            entries.subrange(0, i),
        )[id],
    decreases entries.len() - i,
{
    if i == entries.len() {
        assert(entries.subrange(0, i) =~= entries);
    } else {
        let shorter = entries.drop_last();
        assert(entries.last().0 != id);
        assert(shorter.subrange(0, i) =~= entries.subrange(0, i));
        assert forall|j: int| i <= j < shorter.len() implies (#[trigger] shorter[j]).0 != id by {
            assert(entries[j].0 != id);
        }
        lemma_later_pairs_do_not_matter(shorter, i, id);
    }
}

/// Destinations under the short codes that a shortener generated for them.
pub struct Repository {
    ids: Vec<String>,
    urls: Vec<String>,
    shortener: Shortener,
}

impl Repository {
    /// The stored pairs of code and destination, oldest first.
    pub closed spec fn entries(&self) -> Seq<(Seq<char>, Seq<char>)> {
        Seq::new(self.ids@.len(), |i: int| (self.ids@[i]@, self.urls@[i]@))
    }

    /// The destinations by their codes.
    pub open spec fn urls(&self) -> Map<Seq<char>, Seq<char>> {
        map_of(self.entries())
    }

    /// How many destinations have been stored.
    pub closed spec fn count(&self) -> int {
        self.shortener.count()
    }

    /// What the repository guarantees of itself.
    pub closed spec fn wf(&self) -> bool {
        self.ids@.len() == self.urls@.len()
    }

    /// An empty repository.
    pub fn new() -> (r: Repository)
        ensures
            r.wf(),
            r.count() == 0,
            r.urls() == Map::<Seq<char>, Seq<char>>::empty(),
    {
        let r = Repository { ids: Vec::new(), urls: Vec::new(), shortener: Shortener::new() };
        assert(r.entries() =~= Seq::<(Seq<char>, Seq<char>)>::empty());
        r
    }

    /// Whether another destination can be stored: the shortener has a code
    /// left.
    pub fn has_room(&self) -> (r: bool)
        ensures
            r == (self.count() < u64::MAX),
    {
        self.shortener.has_next()
    }

    /// Stores a destination under the next code and returns the code.
    pub fn store(&mut self, url: &str) -> (id: String)
        requires
            old(self).wf(),
            old(self).count() < u64::MAX,
        ensures
            final(self).wf(),
            final(self).count() == old(self).count() + 1,
            is_code_of(id@, old(self).count() as u64),
            final(self).urls() == old(self).urls().insert(id@, url@),
    {
        let id = self.shortener.next_id();
        self.ids.push(id.clone());
        self.urls.push(url.to_owned());
        assert(self.entries().drop_last() =~= old(self).entries());
        assert(self.entries().last() == (id@, url@));
        id
    }

    /// The destination stored under a code.
    pub fn lookup(&self, id: &str) -> (r: Option<&String>)
        requires
            self.wf(),
        ensures
            match r {
                Some(url) => self.urls().contains_key(id@) && self.urls()[id@] == url@,
                None => !self.urls().contains_key(id@),
            },
    {
        let mut i: usize = self.ids.len();
        proof {
            lemma_later_pairs_do_not_matter(self.entries(), i as int, id@);
        }
        while i > 0
            invariant
                i <= self.ids.len(),
                self.ids@.len() == self.urls@.len(),
                forall|j: int| i <= j < self.entries().len() ==> (#[trigger] self.entries()[j]).0
                    != id@,
            decreases i,
        {
            i = i - 1;
            if crate::text::same_text(self.ids[i].as_str(), id) {
                proof {
                    let upto = self.entries().subrange(0, i + 1);
                    lemma_later_pairs_do_not_matter(self.entries(), i + 1, id@);
                    assert(upto.last() == self.entries()[i as int]);
                }
                return Some(&self.urls[i]);
            }
        }
        proof {
            lemma_later_pairs_do_not_matter(self.entries(), 0, id@);
            assert(self.entries().subrange(0, 0) =~= Seq::<(Seq<char>, Seq<char>)>::empty());
        }
        None
    }
}

} // verus!
