//! The content-addressed store, modelled by the set of hashes whose objects
//! are present. The store answers existence queries and records newly
//! materialized objects; it never forgets one, and recording a hash twice
//! leaves it unchanged, so an existing object path is never overwritten.

use vstd::prelude::*;

use crate::strutil::str_eq;

verus! {

/// The hash-addressed object store. Its view is the set of content hashes
/// whose objects are present.
pub struct ContentStore {
    hashes: Vec<String>,
}

impl View for ContentStore {
    type V = Set<Seq<char>>;

    closed spec fn view(&self) -> Set<Seq<char>> {
        self.hashes@.map_values(|h: String| h@).to_set()
    }
}

impl ContentStore {
    /// A store with no objects.
    pub fn new() -> (r: ContentStore)
        ensures
            r@ == Set::<Seq<char>>::empty(),
    {
        let r = ContentStore { hashes: Vec::new() };
        proof {
            assert(r@ =~= Set::<Seq<char>>::empty());
        }
        r
    }

    /// Whether the object addressed by `h` is present. Existence is treated
    /// as proof of validity; no content re-verification happens on read.
    pub fn has(&self, h: &str) -> (r: bool)
        ensures
            r == self@.contains(h@),
    {
        let mut i: usize = 0;
        while i < self.hashes.len()
            invariant
                i <= self.hashes.len(),
                forall|j: int| 0 <= j < i ==> self.hashes@[j]@ != h@,
            decreases self.hashes.len() - i,
        {
            if str_eq(self.hashes[i].as_str(), h) {
                proof {
                    assert(self.hashes@.map_values(|x: String| x@)[i as int] == h@);
                    assert(self@.contains(h@));
                }
                return true;
            }
            i += 1;
        }
        proof {
            let m = self.hashes@.map_values(|x: String| x@);
            assert(!self@.contains(h@)) by {
                if self@.contains(h@) {
                    assert(m.contains(h@));
                    let j = choose|j: int| #![trigger m[j]] 0 <= j < m.len() && m[j] == h@;
                    assert(self.hashes@[j]@ == h@);
                }
            }
        }
        false
    }

    /// Records that the object addressed by `h` has been materialized.
    /// A hash already present is left alone: the store only ever grows,
    /// and an existing object is never overwritten.
    pub fn record(&mut self, h: &str)
        ensures
            final(self)@ == old(self)@.insert(h@),
    {
        if !self.has(h) {
            let hs = h.to_owned();
            self.hashes.push(hs);
            proof {
                assert(self.hashes@.map_values(|x: String| x@) =~= old(self).hashes@.map_values(
                    |x: String| x@,
                ).push(h@));
                old(self).hashes@.map_values(|x: String| x@).lemma_push_to_set_commute(h@);
                assert(self@ =~= old(self)@.insert(h@));
            }
        } else {
            proof {
                assert(self@ =~= old(self)@.insert(h@));
            }
        }
    }
}

} // verus!
